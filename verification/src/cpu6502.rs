//! The processor core: a register file, a status-flag byte, a read-only
//! opcode table, and the fetch/decode/addressing/execute pipeline driven
//! once per instruction by [`CPU6502::tick`].
//!
//! Fatal conditions (an unknown opcode, an addressing mode the resolver
//! does not define, an instruction whose semantics are not implemented)
//! are returned to the caller as a typed [`Fault`] naming the offending
//! address and opcode byte, rather than aborting the process; the machine
//! state is left untouched by a faulting tick.

use vstd::arithmetic::div_mod::lemma_add_mod_noop;
use vstd::arithmetic::div_mod::lemma_add_mod_noop_right;
use vstd::arithmetic::div_mod::lemma_mod_add_multiples_vanish;
use vstd::arithmetic::div_mod::lemma_mod_bound;
use vstd::arithmetic::div_mod::lemma_mod_sub_multiples_vanish;
use vstd::arithmetic::div_mod::lemma_small_mod;
use vstd::prelude::*;

use crate::bus::Bus;
use crate::device::Addressable;

verus! {

/// The named status-flag bits.  Bit positions 0 through 6 of the status
/// byte hold Carry, Zero, InterruptDisable, DecimalMode, BreakCommand,
/// Overflow and Negative, in that order; bit 7 is unused.
#[derive(Debug, Copy, Clone, PartialEq, Eq, Structural)]
pub enum Flags {
    Carry,
    Zero,
    InterruptDisable,
    DecimalMode,
    BreakCommand,
    Overflow,
    Negative,
}

impl Flags {
    /// The single status-byte bit this flag occupies.
    pub open spec fn spec_mask(self) -> u8 {
        match self {
            Flags::Carry => 0x01,
            Flags::Zero => 0x02,
            Flags::InterruptDisable => 0x04,
            Flags::DecimalMode => 0x08,
            Flags::BreakCommand => 0x10,
            Flags::Overflow => 0x20,
            Flags::Negative => 0x40,
        }
    }

    /// The flag's bit as a byte mask.
    pub fn mask(self) -> (m: u8)
        ensures
            m == self.spec_mask(),
    {
        match self {
            Flags::Carry => 0x01,
            Flags::Zero => 0x02,
            Flags::InterruptDisable => 0x04,
            Flags::DecimalMode => 0x08,
            Flags::BreakCommand => 0x10,
            Flags::Overflow => 0x20,
            Flags::Negative => 0x40,
        }
    }
}

/// Which index register an addressing mode adds to its base address.
#[derive(Debug, Copy, Clone, PartialEq, Eq, Structural)]
pub enum IAMSubMode {
    N,
    X,
    Y,
}

/// Instruction addressing mode.  Only `Accumulator`, `Immediate`,
/// `ZeroPage` and `Absolute` are defined by the addressing-mode resolver;
/// `Indirect`, `Relative` and `Implied` are declared for the opcode table
/// but resolving them through the general resolver is a fault (`Relative`
/// is handled inside the branch instructions instead).
#[derive(Debug, Copy, Clone, PartialEq, Eq, Structural)]
pub enum IAM {
    Accumulator,
    Immediate,
    ZeroPage(IAMSubMode),
    Absolute(IAMSubMode),
    Indirect(IAMSubMode),
    Relative,
    Implied,
}

/// One populated opcode-table slot: the instruction, its addressing mode,
/// its encoded length in bytes and its base cycle count.
#[derive(Debug, Copy, Clone, PartialEq, Eq, Structural)]
pub struct OperationCode {
    /// Semantic operation the opcode performs.
    pub instruction: Instruction,
    /// How the operand is located.
    pub mode: IAM,
    /// Encoded instruction length in bytes (opcode byte included).
    pub bytes: u8,
    /// Base cycle count (declared but not enforced by the pipeline).
    pub cycles: u8,
}

/// The register file.
#[derive(Debug, Copy, Clone, PartialEq, Eq, Structural)]
pub struct Registers {
    /// Address of the next opcode byte to fetch.
    pub program_counter: u16,
    /// Present but unused by the implemented instruction subset.
    pub stack_pointer: u8,
    /// The accumulator.
    pub accumulator: u8,
    /// The X index register.
    pub idx_x: u8,
    /// The Y index register.
    pub idx_y: u8,
    /// The status-flag bitfield (see [`Flags`]).
    pub status_flags: u8,
}

/// The processor core.  All architectural state lives in `registers`; the
/// opcode table is the static mapping [`CPU6502::decode`].
#[derive(Debug)]
pub struct CPU6502 {
    /// The register file; mutated only by instruction handlers.
    pub registers: Registers,
}

/// The instruction kinds the opcode table knows.
#[derive(Debug, Copy, Clone, PartialEq, Eq, Structural)]
pub enum Instruction {
    ADC,
    AND,
    ASL,
    BCC,
    BCS,
    BEQ,
    BIT,
    BMI,
    BNE,
    BPL,
    BRK,
    BVC,
    BVS,
    CLC,
    CLD,
    CLI,
    CLV,
    CMP,
}

/// A fatal condition the pipeline reports instead of proceeding.
#[derive(Debug, Copy, Clone, PartialEq, Eq, Structural)]
pub enum Fault {
    /// The opcode table has no entry for the fetched byte.
    UnknownOpcode { address: u16, opcode: u8 },
    /// The opcode's addressing mode is not defined by the resolver.
    UnsupportedMode { address: u16, opcode: u8 },
    /// The instruction's semantics are not implemented (BRK).
    UnsupportedInstruction { address: u16, opcode: u8 },
}

/// A 16-bit address computed modulo the size of the address space.
pub open spec fn wrap16(x: int) -> u16 {
    (x % 0x10000) as u16
}

/// The signed value of a two's-complement offset byte.
pub open spec fn signed8(off: u8) -> int {
    if off < 0x80 {
        off as int
    } else {
        off as int - 0x100
    }
}

/// Whether bit 7 (the sign bit) of a byte is set.
pub open spec fn bit7(b: u8) -> bool {
    b & 0x80 != 0
}

/// The index-register value an addressing sub-mode adds to the base
/// address: nothing, X, or Y.
pub open spec fn index_offset_of(sub: IAMSubMode, idx_x: u8, idx_y: u8) -> u16 {
    match sub {
        IAMSubMode::N => 0,
        IAMSubMode::X => idx_x as u16,
        IAMSubMode::Y => idx_y as u16,
    }
}

/// The index offset a sub-mode selects from the register file.
pub open spec fn index_offset(sub: IAMSubMode, regs: Registers) -> u16 {
    index_offset_of(sub, regs.idx_x, regs.idx_y)
}

/// Whether the general addressing-mode resolver defines this mode.
pub open spec fn resolvable(mode: IAM) -> bool {
    match mode {
        IAM::Accumulator => true,
        IAM::Immediate => true,
        IAM::ZeroPage(_) => true,
        IAM::Absolute(_) => true,
        IAM::Indirect(_) => false,
        IAM::Relative => false,
        IAM::Implied => false,
    }
}

/// Whether an instruction consults the addressing-mode resolver for its
/// operand.
pub open spec fn uses_operand(instruction: Instruction) -> bool {
    match instruction {
        Instruction::ADC => true,
        Instruction::AND => true,
        Instruction::ASL => true,
        Instruction::CMP => true,
        Instruction::BIT => true,
        _ => false,
    }
}

/// Whether an instruction is a conditional relative branch.
pub open spec fn is_branch(instruction: Instruction) -> bool {
    match instruction {
        Instruction::BCC => true,
        Instruction::BCS => true,
        Instruction::BEQ => true,
        Instruction::BMI => true,
        Instruction::BNE => true,
        Instruction::BPL => true,
        Instruction::BVC => true,
        Instruction::BVS => true,
        _ => false,
    }
}

/// How many instruction bytes a mode's resolution consumes after the
/// opcode byte itself.
pub open spec fn operand_bytes(mode: IAM) -> int {
    match mode {
        IAM::Accumulator => 0,
        IAM::Immediate => 1,
        IAM::ZeroPage(_) => 1,
        IAM::Absolute(_) => 2,
        IAM::Indirect(_) => 1,
        IAM::Relative => 1,
        IAM::Implied => 0,
    }
}

/// The effective memory address a resolvable memory mode denotes, for a
/// core whose registers are `regs` and a bus in state `bus`.  The opcode
/// byte sits at `regs.program_counter`; operand bytes follow it.  For an
/// absolute address the first operand byte is the high half, per the
/// order the bytes are fetched.
pub open spec fn operand_addr<D: Addressable>(mode: IAM, regs: Registers, bus: Bus<D>) -> u16 {
    match mode {
        IAM::Immediate => wrap16(regs.program_counter + 1),
        IAM::ZeroPage(sub) => wrap16(
            bus.read_value(wrap16(regs.program_counter + 1)) + index_offset(sub, regs),
        ),
        IAM::Absolute(sub) => wrap16(
            bus.read_value(wrap16(regs.program_counter + 1)) * 256 + bus.read_value(
                wrap16(regs.program_counter + 2),
            ) + index_offset(sub, regs),
        ),
        _ => 0,
    }
}

/// The operand byte a resolvable mode yields: the accumulator, or the
/// byte at the effective address.
pub open spec fn operand_value<D: Addressable>(mode: IAM, regs: Registers, bus: Bus<D>) -> u8 {
    match mode {
        IAM::Accumulator => regs.accumulator,
        _ => bus.read_value(operand_addr(mode, regs, bus)),
    }
}

/// The full add-with-carry sum before it is reduced to a byte.
pub open spec fn adc_sum(accumulator: u8, operand: u8, carry_in: bool) -> int {
    accumulator + operand + (if carry_in {
        1int
    } else {
        0int
    })
}

/// The accumulator after add-with-carry: the sum modulo 256.
pub open spec fn adc_result(accumulator: u8, operand: u8, carry_in: bool) -> u8 {
    (adc_sum(accumulator, operand, carry_in) % 256) as u8
}

/// Signed overflow of add-with-carry: the operands share a sign bit and
/// the result's sign bit differs from it.
pub open spec fn adc_overflow(accumulator: u8, operand: u8, carry_in: bool) -> bool {
    bit7(accumulator) == bit7(operand) && bit7(adc_result(accumulator, operand, carry_in))
        != bit7(accumulator)
}

/// The status byte after add-with-carry: Carry, Overflow, Zero and
/// Negative updated, in the order the handler applies them.
pub open spec fn adc_status(status: u8, accumulator: u8, operand: u8, carry_in: bool) -> u8 {
    let r = adc_result(accumulator, operand, carry_in);
    apply_flag(
        apply_flag(
            apply_flag(
                apply_flag(
                    status,
                    Flags::Carry.spec_mask(),
                    adc_sum(accumulator, operand, carry_in) > 255,
                ),
                Flags::Overflow.spec_mask(),
                adc_overflow(accumulator, operand, carry_in),
            ),
            Flags::Zero.spec_mask(),
            r == 0,
        ),
        Flags::Negative.spec_mask(),
        bit7(r),
    )
}

/// The status byte with Zero and Negative set from a result byte.
pub open spec fn zn_status(status: u8, result: u8) -> u8 {
    apply_flag(
        apply_flag(status, Flags::Zero.spec_mask(), result == 0),
        Flags::Negative.spec_mask(),
        bit7(result),
    )
}

/// The byte after an arithmetic shift left by one bit.
pub open spec fn asl_result(b: u8) -> u8 {
    ((b * 2) % 256) as u8
}

/// The bit an arithmetic shift left vacates into Carry.
pub open spec fn asl_carry(b: u8) -> bool {
    bit7(b)
}

/// The byte difference `accumulator - operand` modulo 256.
pub open spec fn cmp_diff(accumulator: u8, operand: u8) -> u8 {
    if accumulator >= operand {
        (accumulator - operand) as u8
    } else {
        (accumulator - operand + 0x100) as u8
    }
}

/// The status byte after a compare: Carry iff the accumulator is not
/// below the operand, Zero iff they are equal, Negative from the sign of
/// their byte difference.
pub open spec fn cmp_status(status: u8, accumulator: u8, operand: u8) -> u8 {
    apply_flag(
        apply_flag(
            apply_flag(status, Flags::Carry.spec_mask(), accumulator >= operand),
            Flags::Zero.spec_mask(),
            accumulator == operand,
        ),
        Flags::Negative.spec_mask(),
        bit7(cmp_diff(accumulator, operand)),
    )
}

/// The status byte after a bit test: Zero iff accumulator and operand
/// share no set bit; Overflow and Negative copied from operand bits 6
/// and 7.
pub open spec fn bit_status(status: u8, accumulator: u8, operand: u8) -> u8 {
    apply_flag(
        apply_flag(
            apply_flag(status, Flags::Zero.spec_mask(), accumulator & operand == 0),
            Flags::Overflow.spec_mask(),
            operand & 0x40 != 0,
        ),
        Flags::Negative.spec_mask(),
        bit7(operand),
    )
}

/// The flag polarity a conditional branch tests.
pub open spec fn branch_cond(instruction: Instruction, regs: Registers) -> bool {
    match instruction {
        Instruction::BCC => !regs.flag_set(Flags::Carry),
        Instruction::BCS => regs.flag_set(Flags::Carry),
        Instruction::BEQ => regs.flag_set(Flags::Zero),
        Instruction::BMI => regs.flag_set(Flags::Negative),
        Instruction::BNE => !regs.flag_set(Flags::Zero),
        Instruction::BPL => !regs.flag_set(Flags::Negative),
        Instruction::BVC => !regs.flag_set(Flags::Overflow),
        Instruction::BVS => regs.flag_set(Flags::Overflow),
        _ => false,
    }
}

/// Where a taken branch lands: the natural next-instruction address plus
/// the signed offset byte, modulo the address space.
pub open spec fn branch_target(pc: u16, off: u8) -> u16 {
    wrap16(pc + 2 + signed8(off))
}

/// The status byte with one flag bit forced to `set`.
pub open spec fn apply_flag(status: u8, mask: u8, set: bool) -> u8 {
    if set {
        status | mask
    } else {
        status & !mask
    }
}

impl Registers {
    /// Whether a flag's bit is set in the status byte.
    pub open spec fn flag_set(self, flag: Flags) -> bool {
        self.status_flags & flag.spec_mask() != 0
    }

    /// The reset register file: everything zero.
    pub fn new() -> (r: Registers)
        ensures
            (r == Registers {
                program_counter: 0,
                stack_pointer: 0,
                accumulator: 0,
                idx_x: 0,
                idx_y: 0,
                status_flags: 0,
            }),
    {
        Registers {
            program_counter: 0,
            stack_pointer: 0,
            accumulator: 0,
            idx_x: 0,
            idx_y: 0,
            status_flags: 0,
        }
    }

    /// Read one flag bit.
    pub fn get_flag(&mut self, flag: Flags) -> (r: bool)
        ensures
            *final(self) == *old(self),
            r == old(self).flag_set(flag),
    {
        let m: u8 = flag.mask();
        (self.status_flags & m) != 0
    }

    /// Set or clear exactly one flag bit; every other bit of the status
    /// byte, and every other register, keeps its value.
    pub fn set_flag(&mut self, flag: Flags, set: bool)
        ensures
            (*final(self) == Registers {
                status_flags: apply_flag(old(self).status_flags, flag.spec_mask(), set),
                ..*old(self)
            }),
    {
        let m: u8 = flag.mask();
        match set {
            true => { self.status_flags = self.status_flags | m },
            false => { self.status_flags = self.status_flags & !m },
        }
    }
}

impl CPU6502 {
    /// The opcode table as a static, immutable mapping (specification
    /// side).  A byte decodes to `Some` descriptor exactly when the table
    /// populates that slot.
    pub open spec fn spec_decode(byte: u8) -> Option<OperationCode> {
        if byte == 0x69 {
            Some(OperationCode { instruction: Instruction::ADC, mode: IAM::Immediate, bytes: 2, cycles: 2 })
        } else if byte == 0x65 {
            Some(OperationCode { instruction: Instruction::ADC, mode: IAM::ZeroPage(IAMSubMode::N), bytes: 2, cycles: 3 })
        } else if byte == 0x75 {
            Some(OperationCode { instruction: Instruction::ADC, mode: IAM::ZeroPage(IAMSubMode::X), bytes: 2, cycles: 4 })
        } else if byte == 0x6D {
            Some(OperationCode { instruction: Instruction::ADC, mode: IAM::Absolute(IAMSubMode::N), bytes: 3, cycles: 4 })
        } else if byte == 0x7D {
            Some(OperationCode { instruction: Instruction::ADC, mode: IAM::Absolute(IAMSubMode::X), bytes: 3, cycles: 4 })
        } else if byte == 0x79 {
            Some(OperationCode { instruction: Instruction::ADC, mode: IAM::Absolute(IAMSubMode::Y), bytes: 3, cycles: 4 })
        } else if byte == 0x61 {
            Some(OperationCode { instruction: Instruction::ADC, mode: IAM::Indirect(IAMSubMode::X), bytes: 2, cycles: 6 })
        } else if byte == 0x71 {
            Some(OperationCode { instruction: Instruction::ADC, mode: IAM::Indirect(IAMSubMode::Y), bytes: 2, cycles: 5 })
        } else if byte == 0x29 {
            Some(OperationCode { instruction: Instruction::AND, mode: IAM::Immediate, bytes: 2, cycles: 2 })
        } else if byte == 0x25 {
            Some(OperationCode { instruction: Instruction::AND, mode: IAM::ZeroPage(IAMSubMode::N), bytes: 2, cycles: 3 })
        } else if byte == 0x35 {
            Some(OperationCode { instruction: Instruction::AND, mode: IAM::ZeroPage(IAMSubMode::X), bytes: 2, cycles: 4 })
        } else if byte == 0x2D {
            Some(OperationCode { instruction: Instruction::AND, mode: IAM::Absolute(IAMSubMode::N), bytes: 3, cycles: 4 })
        } else if byte == 0x3D {
            Some(OperationCode { instruction: Instruction::AND, mode: IAM::Absolute(IAMSubMode::X), bytes: 3, cycles: 4 })
        } else if byte == 0x39 {
            Some(OperationCode { instruction: Instruction::AND, mode: IAM::Absolute(IAMSubMode::Y), bytes: 3, cycles: 4 })
        } else if byte == 0x21 {
            Some(OperationCode { instruction: Instruction::AND, mode: IAM::Indirect(IAMSubMode::X), bytes: 2, cycles: 6 })
        } else if byte == 0x31 {
            Some(OperationCode { instruction: Instruction::AND, mode: IAM::Indirect(IAMSubMode::Y), bytes: 2, cycles: 5 })
        } else if byte == 0x0A {
            Some(OperationCode { instruction: Instruction::ASL, mode: IAM::Accumulator, bytes: 1, cycles: 2 })
        } else if byte == 0x06 {
            Some(OperationCode { instruction: Instruction::ASL, mode: IAM::ZeroPage(IAMSubMode::N), bytes: 2, cycles: 5 })
        } else if byte == 0x16 {
            Some(OperationCode { instruction: Instruction::ASL, mode: IAM::ZeroPage(IAMSubMode::X), bytes: 2, cycles: 6 })
        } else if byte == 0x0E {
            Some(OperationCode { instruction: Instruction::ASL, mode: IAM::Absolute(IAMSubMode::N), bytes: 3, cycles: 6 })
        } else if byte == 0x1E {
            Some(OperationCode { instruction: Instruction::ASL, mode: IAM::Absolute(IAMSubMode::X), bytes: 3, cycles: 7 })
        } else if byte == 0x90 {
            Some(OperationCode { instruction: Instruction::BCC, mode: IAM::Relative, bytes: 2, cycles: 2 })
        } else if byte == 0xB0 {
            Some(OperationCode { instruction: Instruction::BCS, mode: IAM::Relative, bytes: 2, cycles: 2 })
        } else if byte == 0xF0 {
            Some(OperationCode { instruction: Instruction::BEQ, mode: IAM::Relative, bytes: 2, cycles: 2 })
        } else if byte == 0x24 {
            Some(OperationCode { instruction: Instruction::BIT, mode: IAM::ZeroPage(IAMSubMode::N), bytes: 2, cycles: 3 })
        } else if byte == 0x2C {
            Some(OperationCode { instruction: Instruction::BIT, mode: IAM::Absolute(IAMSubMode::Y), bytes: 3, cycles: 4 })
        } else if byte == 0x30 {
            Some(OperationCode { instruction: Instruction::BMI, mode: IAM::Relative, bytes: 2, cycles: 2 })
        } else if byte == 0xD0 {
            Some(OperationCode { instruction: Instruction::BNE, mode: IAM::Relative, bytes: 2, cycles: 2 })
        } else if byte == 0x10 {
            Some(OperationCode { instruction: Instruction::BPL, mode: IAM::Relative, bytes: 2, cycles: 2 })
        } else if byte == 0x00 {
            Some(OperationCode { instruction: Instruction::BRK, mode: IAM::Implied, bytes: 1, cycles: 7 })
        } else if byte == 0x50 {
            Some(OperationCode { instruction: Instruction::BVC, mode: IAM::Relative, bytes: 2, cycles: 2 })
        } else if byte == 0x70 {
            Some(OperationCode { instruction: Instruction::BVS, mode: IAM::Relative, bytes: 2, cycles: 2 })
        } else if byte == 0x18 {
            Some(OperationCode { instruction: Instruction::CLC, mode: IAM::Implied, bytes: 1, cycles: 2 })
        } else if byte == 0xD8 {
            Some(OperationCode { instruction: Instruction::CLD, mode: IAM::Implied, bytes: 1, cycles: 2 })
        } else if byte == 0x58 {
            Some(OperationCode { instruction: Instruction::CLI, mode: IAM::Implied, bytes: 1, cycles: 2 })
        } else if byte == 0xB8 {
            Some(OperationCode { instruction: Instruction::CLV, mode: IAM::Implied, bytes: 1, cycles: 2 })
        } else if byte == 0xC9 {
            Some(OperationCode { instruction: Instruction::CMP, mode: IAM::Immediate, bytes: 2, cycles: 2 })
        } else if byte == 0xC5 {
            Some(OperationCode { instruction: Instruction::CMP, mode: IAM::ZeroPage(IAMSubMode::N), bytes: 2, cycles: 3 })
        } else if byte == 0xD5 {
            Some(OperationCode { instruction: Instruction::CMP, mode: IAM::ZeroPage(IAMSubMode::X), bytes: 2, cycles: 4 })
        } else if byte == 0xCD {
            Some(OperationCode { instruction: Instruction::CMP, mode: IAM::Absolute(IAMSubMode::N), bytes: 3, cycles: 4 })
        } else if byte == 0xDD {
            Some(OperationCode { instruction: Instruction::CMP, mode: IAM::Absolute(IAMSubMode::X), bytes: 3, cycles: 4 })
        } else if byte == 0xD9 {
            Some(OperationCode { instruction: Instruction::CMP, mode: IAM::Absolute(IAMSubMode::Y), bytes: 3, cycles: 4 })
        } else if byte == 0xC1 {
            Some(OperationCode { instruction: Instruction::CMP, mode: IAM::Indirect(IAMSubMode::X), bytes: 2, cycles: 6 })
        } else if byte == 0xD1 {
            Some(OperationCode { instruction: Instruction::CMP, mode: IAM::Indirect(IAMSubMode::Y), bytes: 2, cycles: 5 })
        } else {
            None
        }
    }

    /// Look one opcode byte up in the table.
    pub fn decode(byte: u8) -> (r: Option<OperationCode>)
        ensures
            r == CPU6502::spec_decode(byte),
    {
        if byte == 0x69 {
            Some(OperationCode { instruction: Instruction::ADC, mode: IAM::Immediate, bytes: 2, cycles: 2 })
        } else if byte == 0x65 {
            Some(OperationCode { instruction: Instruction::ADC, mode: IAM::ZeroPage(IAMSubMode::N), bytes: 2, cycles: 3 })
        } else if byte == 0x75 {
            Some(OperationCode { instruction: Instruction::ADC, mode: IAM::ZeroPage(IAMSubMode::X), bytes: 2, cycles: 4 })
        } else if byte == 0x6D {
            Some(OperationCode { instruction: Instruction::ADC, mode: IAM::Absolute(IAMSubMode::N), bytes: 3, cycles: 4 })
        } else if byte == 0x7D {
            Some(OperationCode { instruction: Instruction::ADC, mode: IAM::Absolute(IAMSubMode::X), bytes: 3, cycles: 4 })
        } else if byte == 0x79 {
            Some(OperationCode { instruction: Instruction::ADC, mode: IAM::Absolute(IAMSubMode::Y), bytes: 3, cycles: 4 })
        } else if byte == 0x61 {
            Some(OperationCode { instruction: Instruction::ADC, mode: IAM::Indirect(IAMSubMode::X), bytes: 2, cycles: 6 })
        } else if byte == 0x71 {
            Some(OperationCode { instruction: Instruction::ADC, mode: IAM::Indirect(IAMSubMode::Y), bytes: 2, cycles: 5 })
        } else if byte == 0x29 {
            Some(OperationCode { instruction: Instruction::AND, mode: IAM::Immediate, bytes: 2, cycles: 2 })
        } else if byte == 0x25 {
            Some(OperationCode { instruction: Instruction::AND, mode: IAM::ZeroPage(IAMSubMode::N), bytes: 2, cycles: 3 })
        } else if byte == 0x35 {
            Some(OperationCode { instruction: Instruction::AND, mode: IAM::ZeroPage(IAMSubMode::X), bytes: 2, cycles: 4 })
        } else if byte == 0x2D {
            Some(OperationCode { instruction: Instruction::AND, mode: IAM::Absolute(IAMSubMode::N), bytes: 3, cycles: 4 })
        } else if byte == 0x3D {
            Some(OperationCode { instruction: Instruction::AND, mode: IAM::Absolute(IAMSubMode::X), bytes: 3, cycles: 4 })
        } else if byte == 0x39 {
            Some(OperationCode { instruction: Instruction::AND, mode: IAM::Absolute(IAMSubMode::Y), bytes: 3, cycles: 4 })
        } else if byte == 0x21 {
            Some(OperationCode { instruction: Instruction::AND, mode: IAM::Indirect(IAMSubMode::X), bytes: 2, cycles: 6 })
        } else if byte == 0x31 {
            Some(OperationCode { instruction: Instruction::AND, mode: IAM::Indirect(IAMSubMode::Y), bytes: 2, cycles: 5 })
        } else if byte == 0x0A {
            Some(OperationCode { instruction: Instruction::ASL, mode: IAM::Accumulator, bytes: 1, cycles: 2 })
        } else if byte == 0x06 {
            Some(OperationCode { instruction: Instruction::ASL, mode: IAM::ZeroPage(IAMSubMode::N), bytes: 2, cycles: 5 })
        } else if byte == 0x16 {
            Some(OperationCode { instruction: Instruction::ASL, mode: IAM::ZeroPage(IAMSubMode::X), bytes: 2, cycles: 6 })
        } else if byte == 0x0E {
            Some(OperationCode { instruction: Instruction::ASL, mode: IAM::Absolute(IAMSubMode::N), bytes: 3, cycles: 6 })
        } else if byte == 0x1E {
            Some(OperationCode { instruction: Instruction::ASL, mode: IAM::Absolute(IAMSubMode::X), bytes: 3, cycles: 7 })
        } else if byte == 0x90 {
            Some(OperationCode { instruction: Instruction::BCC, mode: IAM::Relative, bytes: 2, cycles: 2 })
        } else if byte == 0xB0 {
            Some(OperationCode { instruction: Instruction::BCS, mode: IAM::Relative, bytes: 2, cycles: 2 })
        } else if byte == 0xF0 {
            Some(OperationCode { instruction: Instruction::BEQ, mode: IAM::Relative, bytes: 2, cycles: 2 })
        } else if byte == 0x24 {
            Some(OperationCode { instruction: Instruction::BIT, mode: IAM::ZeroPage(IAMSubMode::N), bytes: 2, cycles: 3 })
        } else if byte == 0x2C {
            Some(OperationCode { instruction: Instruction::BIT, mode: IAM::Absolute(IAMSubMode::Y), bytes: 3, cycles: 4 })
        } else if byte == 0x30 {
            Some(OperationCode { instruction: Instruction::BMI, mode: IAM::Relative, bytes: 2, cycles: 2 })
        } else if byte == 0xD0 {
            Some(OperationCode { instruction: Instruction::BNE, mode: IAM::Relative, bytes: 2, cycles: 2 })
        } else if byte == 0x10 {
            Some(OperationCode { instruction: Instruction::BPL, mode: IAM::Relative, bytes: 2, cycles: 2 })
        } else if byte == 0x00 {
            Some(OperationCode { instruction: Instruction::BRK, mode: IAM::Implied, bytes: 1, cycles: 7 })
        } else if byte == 0x50 {
            Some(OperationCode { instruction: Instruction::BVC, mode: IAM::Relative, bytes: 2, cycles: 2 })
        } else if byte == 0x70 {
            Some(OperationCode { instruction: Instruction::BVS, mode: IAM::Relative, bytes: 2, cycles: 2 })
        } else if byte == 0x18 {
            Some(OperationCode { instruction: Instruction::CLC, mode: IAM::Implied, bytes: 1, cycles: 2 })
        } else if byte == 0xD8 {
            Some(OperationCode { instruction: Instruction::CLD, mode: IAM::Implied, bytes: 1, cycles: 2 })
        } else if byte == 0x58 {
            Some(OperationCode { instruction: Instruction::CLI, mode: IAM::Implied, bytes: 1, cycles: 2 })
        } else if byte == 0xB8 {
            Some(OperationCode { instruction: Instruction::CLV, mode: IAM::Implied, bytes: 1, cycles: 2 })
        } else if byte == 0xC9 {
            Some(OperationCode { instruction: Instruction::CMP, mode: IAM::Immediate, bytes: 2, cycles: 2 })
        } else if byte == 0xC5 {
            Some(OperationCode { instruction: Instruction::CMP, mode: IAM::ZeroPage(IAMSubMode::N), bytes: 2, cycles: 3 })
        } else if byte == 0xD5 {
            Some(OperationCode { instruction: Instruction::CMP, mode: IAM::ZeroPage(IAMSubMode::X), bytes: 2, cycles: 4 })
        } else if byte == 0xCD {
            Some(OperationCode { instruction: Instruction::CMP, mode: IAM::Absolute(IAMSubMode::N), bytes: 3, cycles: 4 })
        } else if byte == 0xDD {
            Some(OperationCode { instruction: Instruction::CMP, mode: IAM::Absolute(IAMSubMode::X), bytes: 3, cycles: 4 })
        } else if byte == 0xD9 {
            Some(OperationCode { instruction: Instruction::CMP, mode: IAM::Absolute(IAMSubMode::Y), bytes: 3, cycles: 4 })
        } else if byte == 0xC1 {
            Some(OperationCode { instruction: Instruction::CMP, mode: IAM::Indirect(IAMSubMode::X), bytes: 2, cycles: 6 })
        } else if byte == 0xD1 {
            Some(OperationCode { instruction: Instruction::CMP, mode: IAM::Indirect(IAMSubMode::Y), bytes: 2, cycles: 5 })
        } else {
            None
        }
    }

    /// A core with reset registers.  The opcode table is the static
    /// mapping [`CPU6502::decode`] and needs no construction.
    pub fn new() -> (r: CPU6502)
        ensures
            (r.registers == Registers {
                program_counter: 0,
                stack_pointer: 0,
                accumulator: 0,
                idx_x: 0,
                idx_y: 0,
                status_flags: 0,
            }),
    {
        CPU6502 { registers: Registers::new() }
    }
}

/// The register file after the execute phase of one instruction, before
/// the pipeline's trailing program-counter advance (which moves past the
/// last consumed byte).  `regs` is the state at fetch time, with the
/// opcode byte at `regs.program_counter`; `bus` is the bus state every
/// operand read observes.
pub open spec fn mid_regs<D: Addressable>(
    op: OperationCode,
    regs: Registers,
    bus: Bus<D>,
) -> Registers {
    let pc_operand = wrap16(regs.program_counter + operand_bytes(op.mode));
    let m = operand_value(op.mode, regs, bus);
    match op.instruction {
        Instruction::ADC => {
            let c = regs.flag_set(Flags::Carry);
            Registers {
                program_counter: pc_operand,
                accumulator: adc_result(regs.accumulator, m, c),
                status_flags: adc_status(regs.status_flags, regs.accumulator, m, c),
                ..regs
            }
        },
        Instruction::AND => Registers {
            program_counter: pc_operand,
            accumulator: regs.accumulator & m,
            status_flags: zn_status(regs.status_flags, regs.accumulator & m),
            ..regs
        },
        Instruction::ASL => {
            let st = apply_flag(regs.status_flags, Flags::Carry.spec_mask(), asl_carry(m));
            if op.mode == IAM::Accumulator {
                Registers {
                    program_counter: pc_operand,
                    accumulator: asl_result(m),
                    status_flags: st,
                    ..regs
                }
            } else {
                Registers { program_counter: pc_operand, status_flags: st, ..regs }
            }
        },
        Instruction::CMP => Registers {
            program_counter: pc_operand,
            status_flags: cmp_status(regs.status_flags, regs.accumulator, m),
            ..regs
        },
        Instruction::BIT => Registers {
            program_counter: pc_operand,
            status_flags: bit_status(regs.status_flags, regs.accumulator, m),
            ..regs
        },
        Instruction::CLC => Registers {
            program_counter: pc_operand,
            status_flags: apply_flag(regs.status_flags, Flags::Carry.spec_mask(), false),
            ..regs
        },
        Instruction::CLD => Registers {
            program_counter: pc_operand,
            status_flags: apply_flag(regs.status_flags, Flags::DecimalMode.spec_mask(), false),
            ..regs
        },
        Instruction::CLI => Registers {
            program_counter: pc_operand,
            status_flags: apply_flag(
                regs.status_flags,
                Flags::InterruptDisable.spec_mask(),
                false,
            ),
            ..regs
        },
        Instruction::CLV => Registers {
            program_counter: pc_operand,
            status_flags: apply_flag(regs.status_flags, Flags::Overflow.spec_mask(), false),
            ..regs
        },
        Instruction::BRK => regs,
        _ => {
            // The eight conditional branches: consume the offset byte,
            // then adjust the program counter if the tested flag matches.
            let off = bus.read_value(wrap16(regs.program_counter + 1));
            Registers {
                program_counter: if branch_cond(op.instruction, regs) {
                    wrap16(regs.program_counter + 1 + signed8(off))
                } else {
                    wrap16(regs.program_counter + 1)
                },
                ..regs
            }
        },
    }
}

/// The register file after one complete `tick` of a populated opcode that
/// executes without fault: the mid-step state with the trailing
/// program-counter advance folded in, stated in closed form.
pub open spec fn step_regs<D: Addressable>(
    op: OperationCode,
    regs: Registers,
    bus: Bus<D>,
) -> Registers {
    let pc_next = wrap16(regs.program_counter + op.bytes);
    let m = operand_value(op.mode, regs, bus);
    match op.instruction {
        Instruction::ADC => {
            let c = regs.flag_set(Flags::Carry);
            Registers {
                program_counter: pc_next,
                accumulator: adc_result(regs.accumulator, m, c),
                status_flags: adc_status(regs.status_flags, regs.accumulator, m, c),
                ..regs
            }
        },
        Instruction::AND => Registers {
            program_counter: pc_next,
            accumulator: regs.accumulator & m,
            status_flags: zn_status(regs.status_flags, regs.accumulator & m),
            ..regs
        },
        Instruction::ASL => {
            let st = apply_flag(regs.status_flags, Flags::Carry.spec_mask(), asl_carry(m));
            if op.mode == IAM::Accumulator {
                Registers {
                    program_counter: pc_next,
                    accumulator: asl_result(m),
                    status_flags: st,
                    ..regs
                }
            } else {
                Registers { program_counter: pc_next, status_flags: st, ..regs }
            }
        },
        Instruction::CMP => Registers {
            program_counter: pc_next,
            status_flags: cmp_status(regs.status_flags, regs.accumulator, m),
            ..regs
        },
        Instruction::BIT => Registers {
            program_counter: pc_next,
            status_flags: bit_status(regs.status_flags, regs.accumulator, m),
            ..regs
        },
        Instruction::CLC => Registers {
            program_counter: pc_next,
            status_flags: apply_flag(regs.status_flags, Flags::Carry.spec_mask(), false),
            ..regs
        },
        Instruction::CLD => Registers {
            program_counter: pc_next,
            status_flags: apply_flag(regs.status_flags, Flags::DecimalMode.spec_mask(), false),
            ..regs
        },
        Instruction::CLI => Registers {
            program_counter: pc_next,
            status_flags: apply_flag(
                regs.status_flags,
                Flags::InterruptDisable.spec_mask(),
                false,
            ),
            ..regs
        },
        Instruction::CLV => Registers {
            program_counter: pc_next,
            status_flags: apply_flag(regs.status_flags, Flags::Overflow.spec_mask(), false),
            ..regs
        },
        Instruction::BRK => regs,
        _ => {
            let off = bus.read_value(wrap16(regs.program_counter + 1));
            Registers {
                program_counter: if branch_cond(op.instruction, regs) {
                    branch_target(regs.program_counter, off)
                } else {
                    pc_next
                },
                ..regs
            }
        },
    }
}

/// The bus after one instruction: only an arithmetic shift on a memory
/// operand writes, and it writes the shifted byte back to the resolved
/// address; every other instruction leaves the bus exactly as it was.
pub open spec fn step_bus<D: Addressable>(
    op: OperationCode,
    regs: Registers,
    pre: Bus<D>,
    post: Bus<D>,
) -> bool {
    if op.instruction == Instruction::ASL && op.mode != IAM::Accumulator {
        let a = operand_addr(op.mode, regs, pre);
        Bus::write_effect(pre, post, a, asl_result(operand_value(op.mode, regs, pre)), pre.mapped(a))
    } else {
        post == pre
    }
}

/// Facts that hold of every populated opcode-table slot: the encoded
/// length is the opcode byte plus the mode's operand bytes, and exactly
/// the branch instructions use the relative mode.
pub open spec fn table_entry_wf(op: OperationCode) -> bool {
    &&& op.bytes == operand_bytes(op.mode) + 1
    &&& (is_branch(op.instruction) <==> op.mode == IAM::Relative)
    &&& !uses_operand(op.instruction) && !is_branch(op.instruction) ==> op.mode == IAM::Implied
}

/// A resolved operand location: the accumulator itself, or a concrete
/// memory address.
enum Address {
    A,
    M(u16),
}

/// The X or Y register value an addressing sub-mode adds as an offset.
fn index_value(sub: IAMSubMode, idx_x: u8, idx_y: u8) -> (r: u16)
    ensures
        r == index_offset_of(sub, idx_x, idx_y),
{
    match sub {
        IAMSubMode::N => 0x00,
        IAMSubMode::X => idx_x as u16,
        IAMSubMode::Y => idx_y as u16,
    }
}

impl CPU6502 {
    /// Advance the program counter by one (wrapping around the address
    /// space) and read the byte it then points at.
    fn next<D: Addressable>(&mut self, bus: &Bus<D>) -> (r: u8)
        requires
            bus.inv(),
        ensures
            (final(self).registers == Registers {
                program_counter: wrap16(old(self).registers.program_counter + 1),
                ..old(self).registers
            }),
            r == bus.read_value(wrap16(old(self).registers.program_counter + 1)),
    {
        proof {
            lemma_wrap16_wadd(self.registers.program_counter, 1);
        }
        self.registers.program_counter = self.registers.program_counter.wrapping_add(1);
        bus.read(self.registers.program_counter)
    }

    /// The addressing-mode resolver: consume the operand bytes the mode
    /// calls for and return the resolved location, the byte stored there
    /// (the operand itself for immediate mode), and the additional cycle
    /// count (always zero; page-cross penalties are not modeled).
    ///
    /// `Indirect`, `Relative` and `Implied` have no resolution; reaching
    /// them here is a fault, reported with the machine state untouched.
    fn fetch<D: Addressable>(&mut self, opcode: &OperationCode, byte: u8, bus: &Bus<D>) -> (r:
        Result<(Address, u8, u8), Fault>)
        requires
            bus.inv(),
        ensures
            ({
                let regs0 = old(self).registers;
                if resolvable(opcode.mode) {
                    match r {
                        Ok(t) => {
                            &&& (final(self).registers == Registers {
                                program_counter: wrap16(
                                    regs0.program_counter + operand_bytes(opcode.mode),
                                ),
                                ..regs0
                            })
                            &&& t.1 == operand_value(opcode.mode, regs0, *bus)
                            &&& t.2 == 0
                            &&& (match t.0 {
                                Address::A => opcode.mode == IAM::Accumulator,
                                Address::M(a) => opcode.mode != IAM::Accumulator && a
                                    == operand_addr(opcode.mode, regs0, *bus),
                            })
                        },
                        Err(_) => false,
                    }
                } else {
                    &&& r == Err::<(Address, u8, u8), Fault>(Fault::UnsupportedMode {
                        address: regs0.program_counter,
                        opcode: byte,
                    })
                    &&& *final(self) == *old(self)
                }
            }),
    {
        match opcode.mode {
            IAM::Accumulator => {
                proof {
                    lemma_wrap16_identity(self.registers.program_counter);
                }
                Ok((Address::A, self.registers.accumulator, 0x00))
            },
            IAM::Immediate => {
                // The operand is the next instruction byte itself; the
                // second bus read of the same cell mirrors the resolver's
                // uniform read-at-resolved-address step.
                let _operand: u8 = self.next(bus);
                let address: u16 = self.registers.program_counter;
                Ok((Address::M(address), bus.read(address), 0x00))
            },
            IAM::ZeroPage(sub) => {
                let base: u8 = self.next(bus);
                let offset: u16 = index_value(sub, self.registers.idx_x, self.registers.idx_y);
                let address: u16 = (base as u16) + offset;
                proof {
                    lemma_small_mod((base + offset) as nat, 0x10000);
                }
                Ok((Address::M(address), bus.read(address), 0x00))
            },
            IAM::Absolute(sub) => {
                let hi: u8 = self.next(bus);
                proof {
                    lemma_wrap16_shift(old(self).registers.program_counter + 1, 1);
                }
                let lo: u8 = self.next(bus);
                let offset: u16 = index_value(sub, self.registers.idx_x, self.registers.idx_y);
                let base: u16 = (hi as u16) * 256 + (lo as u16);
                let address: u16 = base.wrapping_add(offset);
                proof {
                    lemma_wrap16_wadd(base, offset);
                }
                Ok((Address::M(address), bus.read(address), 0x00))
            },
            IAM::Indirect(_) => Err(
                Fault::UnsupportedMode { address: self.registers.program_counter, opcode: byte },
            ),
            IAM::Relative => Err(
                Fault::UnsupportedMode { address: self.registers.program_counter, opcode: byte },
            ),
            IAM::Implied => Err(
                Fault::UnsupportedMode { address: self.registers.program_counter, opcode: byte },
            ),
        }
    }

    /// Add-with-carry: accumulator + operand + Carry, reduced to a byte;
    /// updates Carry, Overflow, Zero and Negative.
    fn adc<D: Addressable>(&mut self, opcode: OperationCode, byte: u8, bus: &mut Bus<D>) -> (r:
        Result<(), Fault>)
        requires
            old(bus).inv(),
            opcode.instruction == Instruction::ADC,
        ensures
            *final(bus) == *old(bus),
            ({
                let regs0 = old(self).registers;
                if resolvable(opcode.mode) {
                    &&& r == Ok::<(), Fault>(())
                    &&& final(self).registers == mid_regs(opcode, regs0, *old(bus))
                } else {
                    &&& r == Err::<(), Fault>(Fault::UnsupportedMode {
                        address: regs0.program_counter,
                        opcode: byte,
                    })
                    &&& *final(self) == *old(self)
                }
            }),
    {
        let accumulator: u8 = self.registers.accumulator;
        let fetched = match self.fetch(&opcode, byte, bus) {
            Ok(t) => t,
            Err(f) => { return Err(f); },
        };
        let (_, addressed, _additional_cycles) = fetched;
        let status: u8 = self.registers.status_flags;
        let carry_in: u8 = status & 0x01;
        proof {
            assert((status & 0x01) == 0 || (status & 0x01) == 1) by (bit_vector);
        }
        let sum: u16 = (accumulator as u16) + (addressed as u16) + (carry_in as u16);
        let result: u8 = (sum % 256) as u8;
        let overflow: bool = (accumulator & 0x80) == (addressed & 0x80) && (result & 0x80)
            != (accumulator & 0x80);
        proof {
            assert((accumulator & 0x80) == 0 || (accumulator & 0x80) == 0x80) by (bit_vector);
            assert((addressed & 0x80) == 0 || (addressed & 0x80) == 0x80) by (bit_vector);
            assert((result & 0x80) == 0 || (result & 0x80) == 0x80) by (bit_vector);
        }
        self.registers.set_flag(Flags::Carry, sum > 255);
        self.registers.set_flag(Flags::Overflow, overflow);
        self.registers.set_flag(Flags::Zero, result == 0x00);
        self.registers.set_flag(Flags::Negative, result & 0b10000000 != 0);
        self.registers.accumulator = result;
        Ok(())
    }

    /// Bitwise and of accumulator and operand; updates Zero and Negative.
    fn and<D: Addressable>(&mut self, opcode: OperationCode, byte: u8, bus: &mut Bus<D>) -> (r:
        Result<(), Fault>)
        requires
            old(bus).inv(),
            opcode.instruction == Instruction::AND,
        ensures
            *final(bus) == *old(bus),
            ({
                let regs0 = old(self).registers;
                if resolvable(opcode.mode) {
                    &&& r == Ok::<(), Fault>(())
                    &&& final(self).registers == mid_regs(opcode, regs0, *old(bus))
                } else {
                    &&& r == Err::<(), Fault>(Fault::UnsupportedMode {
                        address: regs0.program_counter,
                        opcode: byte,
                    })
                    &&& *final(self) == *old(self)
                }
            }),
    {
        let accumulator: u8 = self.registers.accumulator;
        let fetched = match self.fetch(&opcode, byte, bus) {
            Ok(t) => t,
            Err(f) => { return Err(f); },
        };
        let (_, addressed, _additional_cycles) = fetched;
        let result: u8 = accumulator & addressed;
        self.registers.set_flag(Flags::Zero, result == 0x00);
        self.registers.set_flag(Flags::Negative, result & 0b10000000 != 0);
        self.registers.accumulator = result;
        Ok(())
    }

    /// Arithmetic shift left by one bit, written back to the accumulator
    /// or to the resolved memory cell; Carry takes the vacated bit.
    fn asl<D: Addressable>(&mut self, opcode: OperationCode, byte: u8, bus: &mut Bus<D>) -> (r:
        Result<(), Fault>)
        requires
            old(bus).inv(),
            opcode.instruction == Instruction::ASL,
        ensures
            final(bus).inv(),
            ({
                let regs0 = old(self).registers;
                if resolvable(opcode.mode) {
                    &&& r == Ok::<(), Fault>(())
                    &&& final(self).registers == mid_regs(opcode, regs0, *old(bus))
                    &&& step_bus(opcode, regs0, *old(bus), *final(bus))
                } else {
                    &&& r == Err::<(), Fault>(Fault::UnsupportedMode {
                        address: regs0.program_counter,
                        opcode: byte,
                    })
                    &&& *final(self) == *old(self)
                    &&& *final(bus) == *old(bus)
                }
            }),
    {
        let fetched = match self.fetch(&opcode, byte, bus) {
            Ok(t) => t,
            Err(f) => { return Err(f); },
        };
        let (address, addressed, _additional_cycles) = fetched;
        let carry: bool = (addressed & 0b10000000) >> 7 == 0x01;
        let result: u8 = addressed << 1;
        proof {
            assert(((addressed & 0x80) >> 7 == 1) == (addressed & 0x80 != 0)) by (bit_vector);
            assert((addressed << 1) as int == (addressed * 2) % 256) by (bit_vector);
        }
        match address {
            Address::A => {
                self.registers.accumulator = result;
            },
            Address::M(a) => {
                bus.write(a, result);
            },
        }
        self.registers.set_flag(Flags::Carry, carry);
        Ok(())
    }

    /// Compare accumulator with operand: Carry iff no borrow, Zero iff
    /// equal, Negative from the sign of the byte difference.
    fn cmp<D: Addressable>(&mut self, opcode: OperationCode, byte: u8, bus: &mut Bus<D>) -> (r:
        Result<(), Fault>)
        requires
            old(bus).inv(),
            opcode.instruction == Instruction::CMP,
        ensures
            *final(bus) == *old(bus),
            ({
                let regs0 = old(self).registers;
                if resolvable(opcode.mode) {
                    &&& r == Ok::<(), Fault>(())
                    &&& final(self).registers == mid_regs(opcode, regs0, *old(bus))
                } else {
                    &&& r == Err::<(), Fault>(Fault::UnsupportedMode {
                        address: regs0.program_counter,
                        opcode: byte,
                    })
                    &&& *final(self) == *old(self)
                }
            }),
    {
        let accumulator: u8 = self.registers.accumulator;
        let fetched = match self.fetch(&opcode, byte, bus) {
            Ok(t) => t,
            Err(f) => { return Err(f); },
        };
        let (_, addressed, _additional_cycles) = fetched;
        let difference: u8 = accumulator.wrapping_sub(addressed);
        self.registers.set_flag(Flags::Carry, accumulator >= addressed);
        self.registers.set_flag(Flags::Zero, accumulator == addressed);
        self.registers.set_flag(Flags::Negative, difference & 0b10000000 != 0);
        Ok(())
    }

    /// Bit test: Zero from accumulator & operand, Overflow and Negative
    /// copied from operand bits 6 and 7.
    fn bit<D: Addressable>(&mut self, opcode: OperationCode, byte: u8, bus: &mut Bus<D>) -> (r:
        Result<(), Fault>)
        requires
            old(bus).inv(),
            opcode.instruction == Instruction::BIT,
        ensures
            *final(bus) == *old(bus),
            ({
                let regs0 = old(self).registers;
                if resolvable(opcode.mode) {
                    &&& r == Ok::<(), Fault>(())
                    &&& final(self).registers == mid_regs(opcode, regs0, *old(bus))
                } else {
                    &&& r == Err::<(), Fault>(Fault::UnsupportedMode {
                        address: regs0.program_counter,
                        opcode: byte,
                    })
                    &&& *final(self) == *old(self)
                }
            }),
    {
        let accumulator: u8 = self.registers.accumulator;
        let fetched = match self.fetch(&opcode, byte, bus) {
            Ok(t) => t,
            Err(f) => { return Err(f); },
        };
        let (_, addressed, _additional_cycles) = fetched;
        self.registers.set_flag(Flags::Zero, accumulator & addressed == 0x00);
        self.registers.set_flag(Flags::Overflow, addressed & 0x40 != 0);
        self.registers.set_flag(Flags::Negative, addressed & 0b10000000 != 0);
        Ok(())
    }

    /// Consume the offset byte of a conditional branch and, when the
    /// branch is taken, move the program counter by its signed value.
    fn branch<D: Addressable>(&mut self, bus: &Bus<D>, take: bool)
        requires
            bus.inv(),
        ensures
            ({
                let regs0 = old(self).registers;
                let off = bus.read_value(wrap16(regs0.program_counter + 1));
                (final(self).registers == Registers {
                    program_counter: if take {
                        wrap16(regs0.program_counter + 1 + signed8(off))
                    } else {
                        wrap16(regs0.program_counter + 1)
                    },
                    ..regs0
                })
            }),
    {
        let offset: u8 = self.next(bus);
        if take {
            if offset < 0x80 {
                proof {
                    lemma_wrap16_wadd(self.registers.program_counter, offset as u16);
                    lemma_wrap16_shift(old(self).registers.program_counter + 1, offset as int);
                }
                self.registers.program_counter = self.registers.program_counter.wrapping_add(
                    offset as u16,
                );
            } else {
                proof {
                    lemma_wrap16_wsub(self.registers.program_counter, (0x100 - offset as u16) as u16);
                    lemma_wrap16_shift(
                        old(self).registers.program_counter + 1,
                        offset as int - 0x100,
                    );
                }
                self.registers.program_counter = self.registers.program_counter.wrapping_sub(
                    0x100 - (offset as u16),
                );
            }
        }
    }

    /// Dispatch one decoded instruction to its semantic handler.
    fn execute<D: Addressable>(&mut self, bus: &mut Bus<D>, opcode: OperationCode, byte: u8) -> (r:
        Result<(), Fault>)
        requires
            old(bus).inv(),
            table_entry_wf(opcode),
        ensures
            final(bus).inv(),
            ({
                let regs0 = old(self).registers;
                if uses_operand(opcode.instruction) && !resolvable(opcode.mode) {
                    &&& r == Err::<(), Fault>(Fault::UnsupportedMode {
                        address: regs0.program_counter,
                        opcode: byte,
                    })
                    &&& *final(self) == *old(self)
                    &&& *final(bus) == *old(bus)
                } else if opcode.instruction == Instruction::BRK {
                    &&& r == Err::<(), Fault>(Fault::UnsupportedInstruction {
                        address: regs0.program_counter,
                        opcode: byte,
                    })
                    &&& *final(self) == *old(self)
                    &&& *final(bus) == *old(bus)
                } else {
                    &&& r == Ok::<(), Fault>(())
                    &&& final(self).registers == mid_regs(opcode, regs0, *old(bus))
                    &&& step_bus(opcode, regs0, *old(bus), *final(bus))
                }
            }),
    {
        proof {
            lemma_wrap16_identity(self.registers.program_counter);
        }
        match opcode.instruction {
            Instruction::ADC => self.adc(opcode, byte, bus),
            Instruction::AND => self.and(opcode, byte, bus),
            Instruction::ASL => self.asl(opcode, byte, bus),
            Instruction::BCC => {
                let take: bool = !self.registers.get_flag(Flags::Carry);
                self.branch(bus, take);
                Ok(())
            },
            Instruction::BCS => {
                let take: bool = self.registers.get_flag(Flags::Carry);
                self.branch(bus, take);
                Ok(())
            },
            Instruction::BEQ => {
                let take: bool = self.registers.get_flag(Flags::Zero);
                self.branch(bus, take);
                Ok(())
            },
            Instruction::BIT => self.bit(opcode, byte, bus),
            Instruction::BMI => {
                let take: bool = self.registers.get_flag(Flags::Negative);
                self.branch(bus, take);
                Ok(())
            },
            Instruction::BNE => {
                let take: bool = !self.registers.get_flag(Flags::Zero);
                self.branch(bus, take);
                Ok(())
            },
            Instruction::BPL => {
                let take: bool = !self.registers.get_flag(Flags::Negative);
                self.branch(bus, take);
                Ok(())
            },
            Instruction::BRK => Err(
                Fault::UnsupportedInstruction {
                    address: self.registers.program_counter,
                    opcode: byte,
                },
            ),
            Instruction::BVC => {
                let take: bool = !self.registers.get_flag(Flags::Overflow);
                self.branch(bus, take);
                Ok(())
            },
            Instruction::BVS => {
                let take: bool = self.registers.get_flag(Flags::Overflow);
                self.branch(bus, take);
                Ok(())
            },
            Instruction::CLC => {
                self.registers.set_flag(Flags::Carry, false);
                Ok(())
            },
            Instruction::CLD => {
                self.registers.set_flag(Flags::DecimalMode, false);
                Ok(())
            },
            Instruction::CLI => {
                self.registers.set_flag(Flags::InterruptDisable, false);
                Ok(())
            },
            Instruction::CLV => {
                self.registers.set_flag(Flags::Overflow, false);
                Ok(())
            },
            Instruction::CMP => self.cmp(opcode, byte, bus),
        }
    }

    /// Execute exactly one instruction: fetch the opcode byte at the
    /// program counter, decode it against the opcode table, resolve the
    /// operand, run the handler, and advance past the consumed bytes.
    ///
    /// An empty table slot, an addressing mode the resolver does not
    /// define, or an unimplemented instruction is a fatal condition: the
    /// tick returns a [`Fault`] naming the offending address and opcode
    /// byte, and the registers and the bus are left exactly as they were.
    pub fn tick<D: Addressable>(&mut self, bus: &mut Bus<D>) -> (r: Result<(), Fault>)
        requires
            old(bus).inv(),
        ensures
            final(bus).inv(),
            ({
                let regs0 = old(self).registers;
                let byte = old(bus).read_value(regs0.program_counter);
                match CPU6502::spec_decode(byte) {
                    None => {
                        &&& r == Err::<(), Fault>(Fault::UnknownOpcode {
                            address: regs0.program_counter,
                            opcode: byte,
                        })
                        &&& *final(self) == *old(self)
                        &&& *final(bus) == *old(bus)
                    },
                    Some(op) => {
                        if uses_operand(op.instruction) && !resolvable(op.mode) {
                            &&& r == Err::<(), Fault>(Fault::UnsupportedMode {
                                address: regs0.program_counter,
                                opcode: byte,
                            })
                            &&& *final(self) == *old(self)
                            &&& *final(bus) == *old(bus)
                        } else if op.instruction == Instruction::BRK {
                            &&& r == Err::<(), Fault>(Fault::UnsupportedInstruction {
                                address: regs0.program_counter,
                                opcode: byte,
                            })
                            &&& *final(self) == *old(self)
                            &&& *final(bus) == *old(bus)
                        } else {
                            &&& r == Ok::<(), Fault>(())
                            &&& final(self).registers == step_regs(op, regs0, *old(bus))
                            &&& step_bus(op, regs0, *old(bus), *final(bus))
                        }
                    },
                }
            }),
    {
        let byte: u8 = bus.read(self.registers.program_counter);
        match CPU6502::decode(byte) {
            Some(opcode) => {
                proof {
                    lemma_decode_wf(byte);
                }
                match self.execute(bus, opcode, byte) {
                    Ok(()) => {
                        self.next(bus);
                        proof {
                            lemma_mid_to_step(opcode, old(self).registers, *old(bus));
                        }
                        Ok(())
                    },
                    Err(f) => Err(f),
                }
            },
            None => Err(
                Fault::UnknownOpcode { address: self.registers.program_counter, opcode: byte },
            ),
        }
    }
}

/// An unsigned 16-bit wrapping add lands on the modularly reduced sum.
pub(crate) proof fn lemma_wrap16_wadd(a: u16, b: u16)
    ensures
        vstd::wrapping::u16_specs::wrapping_add(a, b) == wrap16(a + b),
{
    if a + b > 0xFFFF {
        lemma_mod_sub_multiples_vanish(a + b, 0x10000);
        lemma_small_mod((a + b - 0x10000) as nat, 0x10000);
    } else {
        lemma_small_mod((a + b) as nat, 0x10000);
    }
}

/// An unsigned 16-bit wrapping subtract lands on the modularly reduced
/// difference.
pub(crate) proof fn lemma_wrap16_wsub(a: u16, b: u16)
    ensures
        vstd::wrapping::u16_specs::wrapping_sub(a, b) == wrap16(a - b),
{
    if a - b < 0 {
        lemma_mod_add_multiples_vanish(a - b, 0x10000);
        lemma_small_mod((a - b + 0x10000) as nat, 0x10000);
    } else {
        lemma_small_mod((a - b) as nat, 0x10000);
    }
}

/// Bit-level behaviour of the Carry/Overflow/Zero/Negative update that
/// add-with-carry performs: each written flag bit reflects its condition,
/// and the remaining status bits keep their values.
proof fn lemma_cozn_bits(status: u8, c: bool, o: bool, z: bool, n: bool)
    ensures
        ({
            let s = apply_flag(
                apply_flag(apply_flag(apply_flag(status, 0x01, c), 0x20, o), 0x02, z),
                0x40,
                n,
            );
            &&& (s & 0x01 != 0) == c
            &&& (s & 0x20 != 0) == o
            &&& (s & 0x02 != 0) == z
            &&& (s & 0x40 != 0) == n
            &&& s & 0x9C == status & 0x9C
        }),
{
    let s1 = apply_flag(status, 0x01, c);
    let s2 = apply_flag(s1, 0x20, o);
    let s3 = apply_flag(s2, 0x02, z);
    let s4 = apply_flag(s3, 0x40, n);
    assert((s1 == if c { status | 0x01 } else { status & !0x01 }) && (s2 == if o { s1 | 0x20 } else { s1 & !0x20 }) && (s3 == if z { s2 | 0x02 } else { s2 & !0x02 }) && (s4 == if n { s3 | 0x40 } else { s3 & !0x40 }) ==> ((s4 & 0x01 != 0) == c && (s4 & 0x20 != 0) == o && (s4 & 0x02 != 0) == z && (s4 & 0x40 != 0) == n && s4 & 0x9C == status & 0x9C)) by (bit_vector);
}

/// Bit-level behaviour of the Zero/Negative update: the two written bits
/// reflect their conditions and every other status bit keeps its value.
proof fn lemma_zn_bits(status: u8, z: bool, n: bool)
    ensures
        ({
            let s = apply_flag(apply_flag(status, 0x02, z), 0x40, n);
            &&& (s & 0x02 != 0) == z
            &&& (s & 0x40 != 0) == n
            &&& s & 0xBD == status & 0xBD
        }),
{
    let s1 = apply_flag(status, 0x02, z);
    let s2 = apply_flag(s1, 0x40, n);
    assert((s1 == if z { status | 0x02 } else { status & !0x02 }) && (s2 == if n { s1 | 0x40 } else { s1 & !0x40 }) ==> ((s2 & 0x02 != 0) == z && (s2 & 0x40 != 0) == n && s2 & 0xBD == status & 0xBD)) by (bit_vector);
}

/// Add-with-carry computes `(A + M + c) mod 256`; afterwards Carry holds
/// exactly when the full sum exceeded a byte, Zero exactly when the
/// result byte is zero, and Negative exactly when its bit 7 is set.
pub proof fn lemma_adc_properties(accumulator: u8, operand: u8, carry_in: bool, status: u8)
    ensures
        adc_result(accumulator, operand, carry_in) == (accumulator + operand + (if carry_in {
            1int
        } else {
            0int
        })) % 256,
        ({
            let s = adc_status(status, accumulator, operand, carry_in);
            &&& (s & Flags::Carry.spec_mask() != 0) <==> (adc_sum(accumulator, operand, carry_in)
                > 255)
            &&& (s & Flags::Zero.spec_mask() != 0) <==> (adc_result(accumulator, operand, carry_in)
                == 0)
            &&& (s & Flags::Negative.spec_mask() != 0) <==> bit7(
                adc_result(accumulator, operand, carry_in),
            )
            &&& (s & Flags::Overflow.spec_mask() != 0) <==> adc_overflow(
                accumulator,
                operand,
                carry_in,
            )
        }),
{
    let r = adc_result(accumulator, operand, carry_in);
    lemma_cozn_bits(
        status,
        adc_sum(accumulator, operand, carry_in) > 255,
        adc_overflow(accumulator, operand, carry_in),
        r == 0,
        bit7(r),
    );
}

/// Bitwise and updates only Zero and Negative: the result is `A & M`,
/// Zero holds exactly when it is zero, Negative exactly when its bit 7
/// is set, and Carry and Overflow keep their values for every initial
/// status byte.
pub proof fn lemma_and_properties(accumulator: u8, operand: u8, status: u8)
    ensures
        ({
            let r = accumulator & operand;
            let s = zn_status(status, r);
            &&& (s & Flags::Zero.spec_mask() != 0) <==> (r == 0)
            &&& (s & Flags::Negative.spec_mask() != 0) <==> bit7(r)
            &&& s & Flags::Carry.spec_mask() == status & Flags::Carry.spec_mask()
            &&& s & Flags::Overflow.spec_mask() == status & Flags::Overflow.spec_mask()
        }),
{
    let r = accumulator & operand;
    lemma_zn_bits(status, r == 0, bit7(r));
    let s = zn_status(status, r);
    assert(s & 0xBD == status & 0xBD ==> s & 0x01 == status & 0x01 && s & 0x20 == status & 0x20)
        by (bit_vector);
}

/// A conditional branch adjusts the program counter by the signed offset
/// byte exactly when its flag condition holds before execution, and
/// otherwise leaves it at the natural next-instruction address; no other
/// register and no flag changes.  For BEQ the condition is the Zero flag.
pub proof fn lemma_branch_semantics<D: Addressable>(op: OperationCode, regs: Registers, bus: Bus<D>)
    requires
        is_branch(op.instruction),
        table_entry_wf(op),
    ensures
        ({
            let off = bus.read_value(wrap16(regs.program_counter + 1));
            let after = step_regs(op, regs, bus);
            &&& after.program_counter == if branch_cond(op.instruction, regs) {
                branch_target(regs.program_counter, off)
            } else {
                wrap16(regs.program_counter + 2)
            }
            &&& after.status_flags == regs.status_flags
            &&& after.accumulator == regs.accumulator
            &&& op.instruction == Instruction::BEQ ==> branch_cond(op.instruction, regs)
                == regs.flag_set(Flags::Zero)
        }),
{
}

/// A flag-clear instruction clears exactly its named status bit: the
/// cleared bit reads zero afterwards, and every one of the other six flag
/// bits, and the unused bit 7, keeps its value, for every possible
/// initial status byte.
pub proof fn lemma_flag_clear_properties(status: u8, flag: Flags, other: Flags)
    requires
        other != flag,
    ensures
        apply_flag(status, flag.spec_mask(), false) & flag.spec_mask() == 0,
        apply_flag(status, flag.spec_mask(), false) & other.spec_mask() == status
            & other.spec_mask(),
        apply_flag(status, flag.spec_mask(), false) & 0x80 == status & 0x80,
{
    let m = flag.spec_mask();
    let k = other.spec_mask();
    assert((status & !m) & m == 0) by (bit_vector);
    assert((status & !m) & k == status & k && (status & !m) & 0x80 == status & 0x80)
        by (bit_vector)
        requires
            (m == 0x01 || m == 0x02 || m == 0x04 || m == 0x08 || m == 0x10 || m == 0x20 || m
                == 0x40),
            (k == 0x01 || k == 0x02 || k == 0x04 || k == 0x08 || k == 0x10 || k == 0x20 || k
                == 0x40),
            m != k,
    ;
}

/// Every slot the opcode table populates is well-formed.
proof fn lemma_decode_wf(byte: u8)
    ensures
        match CPU6502::spec_decode(byte) {
            Some(op) => table_entry_wf(op),
            None => true,
        },
{
}

/// Reducing modulo the address space is the identity on addresses.
pub(crate) proof fn lemma_wrap16_identity(x: u16)
    ensures
        wrap16(x as int) == x,
{
    lemma_small_mod(x as nat, 0x10000);
}

/// Wrapping composes: shifting an already-wrapped value wraps to the same
/// address as shifting the original.
pub(crate) proof fn lemma_wrap16_shift(x: int, d: int)
    ensures
        wrap16(wrap16(x) + d) == wrap16(x + d),
{
    lemma_mod_bound(x, 0x10000);
    lemma_add_mod_noop(x, d, 0x10000);
    lemma_add_mod_noop_right(x % 0x10000, d, 0x10000);
}

/// The complete step is the mid step followed by one trailing
/// program-counter increment.
proof fn lemma_mid_to_step<D: Addressable>(op: OperationCode, regs: Registers, bus: Bus<D>)
    requires
        table_entry_wf(op),
        op.instruction != Instruction::BRK,
    ensures
        (step_regs(op, regs, bus) == Registers {
            program_counter: wrap16(mid_regs(op, regs, bus).program_counter + 1),
            ..mid_regs(op, regs, bus)
        }),
{
    let pc = regs.program_counter;
    let off = bus.read_value(wrap16(pc + 1));
    lemma_wrap16_shift(pc + operand_bytes(op.mode), 1);
    lemma_wrap16_shift(pc + 1 + signed8(off), 1);
    lemma_wrap16_shift(pc + 1, 1);
}

} // verus!
